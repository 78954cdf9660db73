//! Following a reference from the cell that holds it to the row it points at.
//!
//! A foreign key is the one relationship a database states outright, and
//! following it by hand means reading a value off the screen, finding the other
//! table in the tree, and typing the value back in.
use crate::browsing::relation_opened;
use crate::catalog::{schema_has, ForeignKey, Relation, RelationRef, Schema, SchemaSnapshot};
use crate::lists::{first, group_views, lemma_first, lemma_first_bounds, views};
use crate::pane::{Filter, FilterView};
use crate::showing::group_showing;
use crate::text::{join, joined, maybe, same, texts};
use crate::window::{
    active_pane, browsed, catalog, group_window, well_formed, WindowView, Workspace,
};
use vstd::prelude::*;

verus! {

broadcast use {group_views, group_window, group_showing};

/// A column of the rows on screen, and what the selected row has in it.
#[derive(Debug)]
pub struct HeldColumn {
    pub name: String,
    /// The value as a statement writes it, and nothing for a null.
    pub literal: Option<String>,
}

/// A column of the rows on screen, as a value.
#[verifier::ext_equal]
pub struct HeldView {
    pub name: Seq<char>,
    pub literal: Option<Seq<char>>,
}

impl View for HeldColumn {
    type V = HeldView;

    open spec fn view(&self) -> HeldView {
        HeldView { name: self.name@, literal: maybe(self.literal) }
    }
}

/// Whether a schema is the one of a relation, and has it.
pub open spec fn schema_holds(relation: (Seq<char>, Seq<char>)) -> spec_fn(Schema) -> bool {
    |schema: Schema| schema.name@ == relation.0 && schema_has(schema, relation.1)
}

/// Whether a relation goes by a name.
pub open spec fn goes_by(name: Seq<char>) -> spec_fn(Relation) -> bool {
    |relation: Relation| relation.reference.name@ == name
}

/// What a catalog knows of a relation.
pub open spec fn described_relation(
    snapshot: SchemaSnapshot,
    relation: (Seq<char>, Seq<char>),
) -> Option<Relation> {
    let at = first(snapshot.schemas@, schema_holds(relation));
    if at < snapshot.schemas@.len() {
        let relations = snapshot.schemas@[at].relations@;
        Some(relations[first(relations, goes_by(relation.1))])
    } else {
        None
    }
}

impl SchemaSnapshot {
    /// What the catalog knows of a relation.
    pub fn relation(&self, reference: &RelationRef) -> (found: Option<&Relation>)
        ensures
            match found {
                Some(relation) => described_relation(*self, reference.parts()) == Some(*relation),
                None => described_relation(*self, reference.parts()) is None,
            },
    {
        let ghost holds = schema_holds(reference.parts());
        let mut at: usize = 0;
        while at < self.schemas.len()
            invariant
                at <= self.schemas@.len(),
                holds == schema_holds(reference.parts()),
                forall|i: int| 0 <= i < at ==> !holds(#[trigger] self.schemas@[i]),
            decreases self.schemas@.len() - at,
        {
            let schema = &self.schemas[at];
            if same(schema.name.as_str(), reference.schema.as_str()) && schema.has(
                reference.name.as_str(),
            ) {
                proof {
                    lemma_first(self.schemas@, holds, at as int);
                }
                let ghost meant = goes_by(reference.name@);
                let mut place: usize = 0;
                while place < schema.relations.len()
                    invariant
                        place <= schema.relations@.len(),
                        schema_has(*schema, reference.name@),
                        meant == goes_by(reference.name@),
                        first(self.schemas@, holds) == at,
                        holds == schema_holds(reference.parts()),
                        at < self.schemas@.len(),
                        *schema == self.schemas@[at as int],
                        forall|i: int| 0 <= i < place ==> !meant(#[trigger] schema.relations@[i]),
                    decreases schema.relations@.len() - place,
                {
                    if same(
                        schema.relations[place].reference.name.as_str(),
                        reference.name.as_str(),
                    ) {
                        proof {
                            lemma_first(schema.relations@, meant, place as int);
                        }
                        return Some(&schema.relations[place]);
                    }
                    place += 1;
                }
                assert(false);
            }
            at += 1;
        }
        proof {
            lemma_first(self.schemas@, holds, at as int);
        }
        None
    }
}

/// Whether a key has a column of a name.
pub open spec fn key_has(name: Seq<char>) -> spec_fn(ForeignKey) -> bool {
    |key: ForeignKey| texts(key.columns@).contains(name)
}

/// Whether a column of the rows on screen goes by a name.
pub open spec fn is_called(name: Seq<char>) -> spec_fn(HeldView) -> bool {
    |held: HeldView| held.name == name
}

/// One column of a key as a condition on what it refers to. Nothing where the
/// rows do not have the column, where the row has a null in it, or where the
/// key does not say what it refers to.
pub open spec fn key_part(key: ForeignKey, held: Seq<HeldView>, at: int) -> Option<Seq<char>> {
    let place = first(held, is_called(key.columns@[at]@));
    if at < key.targets@.len() && place < held.len() {
        match held[place].literal {
            Some(literal) => Some(key.targets@[at]@ + " = "@ + literal),
            None => None,
        }
    } else {
        None
    }
}

/// The first columns of a key as conditions, or nothing where one of them is
/// none.
pub open spec fn key_parts(key: ForeignKey, held: Seq<HeldView>, count: int) -> Option<
    Seq<Seq<char>>,
>
    decreases count,
{
    if count <= 0 {
        Some(Seq::empty())
    } else {
        match (key_parts(key, held, count - 1), key_part(key, held, count - 1)) {
            (Some(parts), Some(part)) => Some(parts.push(part)),
            _ => None,
        }
    }
}

/// The table and the clause a field of the selected row refers to, by what the
/// catalog knows of the table the row is in.
///
/// Every column of the key, not only the one under the cursor: half a composite
/// key is a filter that would show the wrong row as confidently as the right
/// one.
pub open spec fn reference_of(relation: Relation, held: Seq<HeldView>, column: Seq<char>) -> Option<
    ((Seq<char>, Seq<char>), Seq<char>),
> {
    let keys = relation.foreign_keys@;
    let at = first(keys, key_has(column));
    if at < keys.len() {
        match key_parts(keys[at], held, keys[at].columns@.len() as int) {
            Some(parts) => Some((keys[at].target.parts(), joined(parts, " and "@))),
            None => None,
        }
    } else {
        None
    }
}

/// The table and the clause a field of the selected row refers to.
pub open spec fn pointed_at(window: WindowView, column: usize, held: Seq<HeldView>) -> Option<
    ((Seq<char>, Seq<char>), Seq<char>),
> {
    match (browsed(window), active_pane(window).selected_row, catalog(window)) {
        (Some(source), Some(_), Some(snapshot)) => if column < held.len() {
            match described_relation(snapshot, source) {
                Some(relation) => reference_of(relation, held, held[column as int].name),
                None => None,
            }
        } else {
            None
        },
        _ => None,
    }
}

/// The other table opened on the one row a field refers to.
pub open spec fn reference_followed(window: WindowView, column: usize, held: Seq<HeldView>) -> WindowView {
    match pointed_at(window, column, held) {
        Some((target, clause)) => relation_opened(
            window,
            target,
            Some(FilterView { raw: true, text: clause, chips: Seq::empty() }),
        ),
        None => window,
    }
}

/// A reference, as a value.
pub open spec fn reference_view(reference: Option<(RelationRef, String)>) -> Option<
    ((Seq<char>, Seq<char>), Seq<char>),
> {
    match reference {
        Some(reference) => Some((reference.0.parts(), reference.1@)),
        None => None,
    }
}

/// Where the first key with a column is among some keys, and their number
/// where there is none.
fn key_place(keys: &Vec<ForeignKey>, column: &str) -> (at: usize)
    ensures
        at == first(keys@, key_has(column@)),
{
    let ghost meant = key_has(column@);
    let mut at: usize = 0;
    while at < keys.len()
        invariant
            at <= keys@.len(),
            meant == key_has(column@),
            forall|i: int| 0 <= i < at ==> !meant(#[trigger] keys@[i]),
        decreases keys@.len() - at,
    {
        let ghost names = texts(keys@[at as int].columns@);
        let mut place: usize = 0;
        while place < keys[at].columns.len()
            invariant
                at < keys@.len(),
                names == texts(keys@[at as int].columns@),
                place <= names.len(),
                meant == key_has(column@),
                forall|i: int| 0 <= i < at ==> !meant(#[trigger] keys@[i]),
                forall|i: int| 0 <= i < place ==> (#[trigger] names[i]) != column@,
            decreases names.len() - place,
        {
            assert(names[place as int] == keys@[at as int].columns@[place as int]@);
            if same(keys[at].columns[place].as_str(), column) {
                proof {
                    lemma_first(keys@, meant, at as int);
                }
                return at;
            }
            place += 1;
        }
        assert(!names.contains(column@));
        at += 1;
    }
    proof {
        lemma_first(keys@, meant, at as int);
    }
    at
}

/// One column of a key as a condition.
fn part_of(key: &ForeignKey, held: &Vec<HeldColumn>, at: usize) -> (part: Option<String>)
    requires
        at < key.columns@.len(),
    ensures
        maybe(part) == key_part(*key, views(held@), at as int),
{
    if at >= key.targets.len() {
        return None;
    }
    let ghost all = views(held@);
    let ghost meant = is_called(key.columns@[at as int]@);
    let mut place: usize = 0;
    while place < held.len()
        invariant
            place <= held@.len(),
            all == views(held@),
            at < key.columns@.len(),
            at < key.targets@.len(),
            meant == is_called(key.columns@[at as int]@),
            forall|i: int| 0 <= i < place ==> !meant(#[trigger] all[i]),
        decreases held@.len() - place,
    {
        assert(all[place as int] == held@[place as int]@);
        if same(held[place].name.as_str(), key.columns[at].as_str()) {
            proof {
                lemma_first(all, meant, place as int);
            }
            return match &held[place].literal {
                Some(literal) => {
                    let mut part = key.targets[at].clone();
                    part.append(" = ");
                    part.append(literal.as_str());
                    assert(part@ =~= key.targets@[at as int]@ + " = "@ + literal@);
                    Some(part)
                },
                None => None,
            };
        }
        place += 1;
    }
    proof {
        lemma_first(all, meant, place as int);
    }
    None
}

/// The table and the clause a field of the selected row refers to.
pub fn reference_in(relation: &Relation, held: &Vec<HeldColumn>, column: &str) -> (reference: Option<
    (RelationRef, String),
>)
    ensures
        reference_view(reference) == reference_of(*relation, views(held@), column@),
{
    let place = key_place(&relation.foreign_keys, column);
    proof {
        lemma_first_bounds(relation.foreign_keys@, key_has(column@));
    }
    if place >= relation.foreign_keys.len() {
        return None;
    }
    let key = &relation.foreign_keys[place];
    let mut parts: Vec<String> = Vec::new();
    let mut at: usize = 0;
    assert(texts(parts@) =~= Seq::empty());
    while at < key.columns.len()
        invariant
            at <= key.columns@.len(),
            place == first(relation.foreign_keys@, key_has(column@)),
            place < relation.foreign_keys@.len(),
            *key == relation.foreign_keys@[place as int],
            key_parts(*key, views(held@), at as int) == Some(texts(parts@)),
        decreases key.columns@.len() - at,
    {
        let ghost had = texts(parts@);
        match part_of(key, held, at) {
            Some(part) => {
                parts.push(part);
                assert(texts(parts@) =~= had.push(part@));
            },
            None => {
                proof {
                    lemma_no_parts(*key, views(held@), at as int, key.columns@.len() as int);
                }
                return None;
            },
        }
        at += 1;
    }
    Some((key.target.clone(), join(&parts, " and ")))
}

/// One column that is no condition leaves none of the key.
proof fn lemma_no_parts(key: ForeignKey, held: Seq<HeldView>, at: int, count: int)
    requires
        0 <= at < count,
        key_part(key, held, at) is None,
    ensures
        key_parts(key, held, count) is None,
    decreases count,
{
    if at < count - 1 {
        lemma_no_parts(key, held, at, count - 1);
    }
}

/// A key is followed with all of its columns or not at all.
proof fn lemma_all_parts(key: ForeignKey, held: Seq<HeldView>, count: int)
    requires
        0 <= count,
    ensures
        key_parts(key, held, count) matches Some(parts) ==> parts.len() == count,
    decreases count,
{
    if count > 0 {
        lemma_all_parts(key, held, count - 1);
    }
}

/// A null reference points at nothing: where any column of the key is null in
/// the row, no field of it refers to anything.
pub proof fn a_null_reference_points_at_nothing(
    relation: Relation,
    held: Seq<HeldView>,
    column: Seq<char>,
    at: int,
)
    requires
        first(relation.foreign_keys@, key_has(column)) < relation.foreign_keys@.len(),
        0 <= at < relation.foreign_keys@[first(
            relation.foreign_keys@,
            key_has(column),
        )].columns@.len(),
        ({
            let key = relation.foreign_keys@[first(relation.foreign_keys@, key_has(column))];
            let place = first(held, is_called(key.columns@[at]@));
            place < held.len() && held[place].literal is None
        }),
    ensures
        reference_of(relation, held, column) is None,
{
    let key = relation.foreign_keys@[first(relation.foreign_keys@, key_has(column))];
    lemma_no_parts(key, held, at, key.columns@.len() as int);
}

/// Half a composite key is never a filter: a reference that is followed has a
/// condition for every column of its key.
pub proof fn every_column_of_a_key_is_matched(
    relation: Relation,
    held: Seq<HeldView>,
    column: Seq<char>,
)
    requires
        reference_of(relation, held, column) is Some,
    ensures
        ({
            let key = relation.foreign_keys@[first(relation.foreign_keys@, key_has(column))];
            &&& key_parts(key, held, key.columns@.len() as int) is Some
            &&& key_parts(key, held, key.columns@.len() as int)->Some_0.len()
                == key.columns@.len()
        }),
{
    let key = relation.foreign_keys@[first(relation.foreign_keys@, key_has(column))];
    lemma_all_parts(key, held, key.columns@.len() as int);
}

impl Workspace {
    /// The table and the clause a field of the selected row refers to.
    ///
    /// Nothing when the pane is not on a browsed table, when the column is in
    /// no foreign key, or when any column of that key is null in this row.
    /// `held` is the columns of the rows on screen, with what the selected row
    /// has in them.
    pub fn reference_in_column(&self, column: usize, held: &Vec<HeldColumn>) -> (reference: Option<
        (RelationRef, String),
    >)
        requires
            well_formed(self@),
        ensures
            reference_view(reference) == pointed_at(self@, column, views(held@)),
    {
        let source = match self.browsed() {
            Some(source) => source,
            None => {
                return None;
            },
        };
        let at = self.active_at();
        if self.panes[at].selected_row.is_none() || column >= held.len() {
            return None;
        }
        assert(views(held@)[column as int] == held@[column as int]@);
        match self.described() {
            Some(session) => match &session.snapshot {
                Some(snapshot) => match snapshot.relation(&source) {
                    Some(relation) => reference_in(relation, held, held[column].name.as_str()),
                    None => None,
                },
                None => None,
            },
            None => None,
        }
    }

    /// The table a field of the selected row points at, when it points at one.
    pub fn reference_target(&self, column: usize, held: &Vec<HeldColumn>) -> (target: Option<
        RelationRef,
    >)
        requires
            well_formed(self@),
        ensures
            crate::window::name(target) == match pointed_at(self@, column, views(held@)) {
                Some(reference) => Some(reference.0),
                None => None,
            },
    {
        match self.reference_in_column(column, held) {
            Some(reference) => Some(reference.0),
            None => None,
        }
    }

    /// Open the table a field of the selected row points at, showing the one
    /// row it points at.
    pub fn follow_reference_in(&mut self, column: usize, held: &Vec<HeldColumn>)
        requires
            well_formed(old(self)@),
        ensures
            final(self)@ == reference_followed(old(self)@, column, views(held@)),
            well_formed(final(self)@),
    {
        if let Some((target, clause)) = self.reference_in_column(column, held) {
            // The hand-written box rather than a chip: a hop is an exact match
            // on a key, which is not a thing to half-edit into something that
            // matches two rows.
            let filter = Filter { raw: true, text: clause, chips: Vec::new() };
            assert(filter@ =~= (FilterView { raw: true, text: clause@, chips: Seq::empty() }));
            self.open_relation_filtered(&target, Some(filter));
        }
    }

    /// Open the table the cell under the cursor points at, showing the one row
    /// it points at.
    pub fn follow_reference(&mut self, held: &Vec<HeldColumn>)
        requires
            well_formed(old(self)@),
        ensures
            final(self)@ == reference_followed(
                old(self)@,
                active_pane(old(self)@).selected_column,
                views(held@),
            ),
            well_formed(final(self)@),
    {
        let at = self.active_at();
        let column = self.panes[at].selected_column;
        self.follow_reference_in(column, held);
    }
}

} // verus!
