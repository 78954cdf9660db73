//! What a server has in it, as far as the window reads it.
use crate::text::same;
use vstd::prelude::*;

verus! {

/// What a connection's engine can do.
#[derive(Clone, Copy, PartialEq, Eq, Structural, Debug)]
pub struct Capabilities {
    /// Whether one connection can reach several databases, which then stand
    /// above the schemas.
    pub databases: bool,
    /// Whether what is typed is SQL.
    pub sql: bool,
    /// Whether a statement in flight can be stopped.
    pub cancel: bool,
    /// Whether the server has roles to list.
    pub roles: bool,
    /// Whether the catalog is walked a page at a time.
    pub paged_catalog: bool,
}

impl Capabilities {
    /// A server with databases, schemas in them, and roles beside them.
    pub open spec fn spec_postgres() -> Capabilities {
        Capabilities {
            databases: true,
            sql: true,
            cancel: true,
            roles: true,
            paged_catalog: false,
        }
    }

    /// A key-value server: one flat namespace, walked a page at a time.
    pub open spec fn spec_redis() -> Capabilities {
        Capabilities {
            databases: false,
            sql: false,
            cancel: false,
            roles: false,
            paged_catalog: true,
        }
    }

    /// A server with databases, schemas in them, and roles beside them.
    pub fn postgres() -> (capabilities: Capabilities)
        ensures
            capabilities == Self::spec_postgres(),
    {
        Capabilities {
            databases: true,
            sql: true,
            cancel: true,
            roles: true,
            paged_catalog: false,
        }
    }

    /// A key-value server: one flat namespace, walked a page at a time.
    pub fn redis() -> (capabilities: Capabilities)
        ensures
            capabilities == Self::spec_redis(),
    {
        Capabilities {
            databases: false,
            sql: false,
            cancel: false,
            roles: false,
            paged_catalog: true,
        }
    }
}

/// A relation by name.
#[derive(Debug)]
pub struct RelationRef {
    pub schema: String,
    pub name: String,
}

impl Clone for RelationRef {
    fn clone(&self) -> (copy: Self)
        ensures
            copy == *self,
    {
        RelationRef { schema: self.schema.clone(), name: self.name.clone() }
    }
}

impl RelationRef {
    /// The schema and the name of the relation.
    pub open spec fn parts(&self) -> (Seq<char>, Seq<char>) {
        (self.schema@, self.name@)
    }

    /// `schema.name`.
    pub open spec fn spec_qualified(&self) -> Seq<char> {
        self.schema@.push('.') + self.name@
    }

    /// A relation of a schema.
    pub fn new(schema: &str, name: &str) -> (reference: RelationRef)
        ensures
            reference.parts() == (schema@, name@),
    {
        RelationRef { schema: schema.to_owned(), name: name.to_owned() }
    }

    /// `schema.name`, which is how a relation is written where nothing says
    /// which schema is meant.
    pub fn qualified(&self) -> (text: String)
        ensures
            text@ == self.spec_qualified(),
    {
        let mut text = self.schema.clone();
        text.push('.');
        text.append(self.name.as_str());
        text
    }

    /// Whether two references name the same relation.
    pub fn same_as(&self, other: &RelationRef) -> (answer: bool)
        ensures
            answer == (self.parts() == other.parts()),
    {
        same(self.schema.as_str(), other.schema.as_str()) && same(
            self.name.as_str(),
            other.name.as_str(),
        )
    }
}

/// What kind of relation something is.
#[derive(Clone, Copy, PartialEq, Eq, Structural, Debug)]
pub enum RelationKind {
    Table,
    Partitioned,
    Foreign,
    View,
    MaterializedView,
}

impl RelationKind {
    /// Whether the relation is stored under a query rather than as rows of its
    /// own.
    pub open spec fn spec_is_view(self) -> bool {
        self is View || self is MaterializedView
    }

    /// Whether the relation is a view, materialised or not.
    pub fn is_view(self) -> (answer: bool)
        ensures
            answer == self.spec_is_view(),
    {
        matches!(self, RelationKind::View | RelationKind::MaterializedView)
    }
}

/// A relation in a schema.
pub struct Relation {
    pub reference: RelationRef,
    pub kind: RelationKind,
    /// How many rows the server thinks there are, and a negative number when
    /// nobody has counted.
    pub estimated_rows: i64,
    pub foreign_keys: Vec<ForeignKey>,
}

/// A reference from some columns of a relation to some of another.
pub struct ForeignKey {
    pub columns: Vec<String>,
    pub target: RelationRef,
    /// The columns referred to, one for each, as a statement names them.
    pub targets: Vec<String>,
}

/// A function or a procedure.
pub struct Routine {
    pub name: String,
}

/// A schema and what is in it.
pub struct Schema {
    pub name: String,
    pub relations: Vec<Relation>,
    pub routines: Vec<Routine>,
}

/// The catalog of one database, as it was at one moment.
pub struct SchemaSnapshot {
    /// The database the session is connected to.
    pub database: String,
    /// Every database on the server, as far as it would say.
    pub databases: Vec<String>,
    pub server_version: String,
    /// The schema a name without one is looked up in.
    pub current_schema: String,
    pub schemas: Vec<Schema>,
}

/// A role on a server.
pub struct Role {
    pub name: String,
    /// Whether it can log in, as opposed to being a group of those that can.
    pub can_login: bool,
    /// What is special about it, in words, the most telling first.
    pub attributes: Vec<String>,
    /// The roles it inherits from.
    pub member_of: Vec<String>,
}

/// Every role on a server, and the one the session is.
pub struct RoleSet {
    pub current: String,
    pub roles: Vec<Role>,
}

/// What a key holds.
#[derive(Debug)]
pub enum KeyType {
    /// One value.
    Text,
    List,
    Hash,
    /// A set.
    Members,
    SortedSet,
    Stream,
    /// A type this client does not know, by the server's name for it.
    Other(String),
}

impl Clone for KeyType {
    fn clone(&self) -> (copy: Self)
        ensures
            copy == *self,
    {
        match self {
            KeyType::Text => KeyType::Text,
            KeyType::List => KeyType::List,
            KeyType::Hash => KeyType::Hash,
            KeyType::Members => KeyType::Members,
            KeyType::SortedSet => KeyType::SortedSet,
            KeyType::Stream => KeyType::Stream,
            KeyType::Other(name) => KeyType::Other(name.clone()),
        }
    }
}

/// A key, as a walk of the keyspace lists it.
pub struct KeyInfo {
    pub key: Vec<u8>,
    /// How the key is drawn where its bytes are not text.
    pub drawn: String,
    pub kind: KeyType,
    /// How many seconds it has left. Nothing, or a negative number, when it
    /// has no expiry.
    pub ttl: Option<i64>,
    /// That time in words.
    pub time_left: String,
}

/// One logical database of a key-value server.
pub struct KeyDatabase {
    pub index: u64,
    /// How many keys are in it.
    pub keys: u64,
}

/// The databases of a key-value server.
pub struct Keyspace {
    pub databases: Vec<KeyDatabase>,
    /// The database the connection is on.
    pub current: u64,
}

/// How careful a connection is with writes.
#[derive(Clone, Copy, PartialEq, Eq, Structural, Debug)]
pub enum SafetyLevel {
    Normal,
    /// Writes are asked about first.
    Confirm,
    /// Writes are refused.
    ReadOnly,
}

/// A saved connection, as far as the window reads it.
#[derive(Debug)]
pub struct ConnectionConfig {
    pub id: u128,
    /// What the connection was named, which may be nothing.
    pub name: String,
    /// What the connection is called on screen.
    pub display_name: String,
    pub user: String,
    pub host: String,
    pub port: u16,
    pub database: String,
    pub safety: SafetyLevel,
    pub capabilities: Capabilities,
}

/// A connection's details, as a value.
#[verifier::ext_equal]
pub struct ConfigView {
    pub id: u128,
    pub name: Seq<char>,
    pub display_name: Seq<char>,
    pub user: Seq<char>,
    pub host: Seq<char>,
    pub port: u16,
    pub database: Seq<char>,
    pub safety: SafetyLevel,
    pub capabilities: Capabilities,
}

impl View for ConnectionConfig {
    type V = ConfigView;

    open spec fn view(&self) -> ConfigView {
        ConfigView {
            id: self.id,
            name: self.name@,
            display_name: self.display_name@,
            user: self.user@,
            host: self.host@,
            port: self.port,
            database: self.database@,
            safety: self.safety,
            capabilities: self.capabilities,
        }
    }
}

impl Clone for ConnectionConfig {
    fn clone(&self) -> (copy: Self)
        ensures
            copy == *self,
    {
        ConnectionConfig {
            id: self.id,
            name: self.name.clone(),
            display_name: self.display_name.clone(),
            user: self.user.clone(),
            host: self.host.clone(),
            port: self.port,
            database: self.database.clone(),
            safety: self.safety,
            capabilities: self.capabilities,
        }
    }
}

/// Where a failure came from.
#[derive(Clone, Copy, PartialEq, Eq, Structural, Debug)]
pub enum ErrorClass {
    /// The server could not be reached, or is not connected.
    Connection,
    /// The server, or a rule of the connection, said no.
    Server,
    /// Something on this side went wrong.
    Internal,
}

/// A failure, in the words it is reported in.
#[derive(Debug)]
pub struct DbError {
    pub class: ErrorClass,
    pub message: String,
    /// The message with whatever detail came with it.
    pub full_text: String,
    /// Where in the statement the failure is, counted in characters from zero.
    pub offset: Option<usize>,
    /// Whether the statement was stopped on request.
    pub canceled: bool,
}

/// A failure, as a value.
#[verifier::ext_equal]
pub struct ErrorView {
    pub class: ErrorClass,
    pub message: Seq<char>,
    pub full_text: Seq<char>,
    pub offset: Option<usize>,
    pub canceled: bool,
}

impl View for DbError {
    type V = ErrorView;

    open spec fn view(&self) -> ErrorView {
        ErrorView {
            class: self.class,
            message: self.message@,
            full_text: self.full_text@,
            offset: self.offset,
            canceled: self.canceled,
        }
    }
}

impl Clone for DbError {
    fn clone(&self) -> (copy: Self)
        ensures
            copy == *self,
    {
        DbError {
            class: self.class,
            message: self.message.clone(),
            full_text: self.full_text.clone(),
            offset: self.offset,
            canceled: self.canceled,
        }
    }
}

/// A failure this side words: its message is all there is to say about it.
pub open spec fn worded(class: ErrorClass, message: Seq<char>) -> ErrorView {
    ErrorView { class, message, full_text: message, offset: None, canceled: false }
}

/// What an optional failure says.
pub open spec fn error_view(error: Option<DbError>) -> Option<ErrorView> {
    match error {
        Some(error) => Some(error@),
        None => None,
    }
}

impl DbError {
    /// A failure this side words.
    pub fn new(class: ErrorClass, message: &str) -> (error: DbError)
        ensures
            error@ == worded(class, message@),
    {
        DbError {
            class,
            message: message.to_owned(),
            full_text: message.to_owned(),
            offset: None,
            canceled: false,
        }
    }

    /// The server is not there to ask.
    pub fn connection(message: &str) -> (error: DbError)
        ensures
            error@ == worded(ErrorClass::Connection, message@),
    {
        DbError::new(ErrorClass::Connection, message)
    }

    /// Something on this side went wrong.
    pub fn internal(message: &str) -> (error: DbError)
        ensures
            error@ == worded(ErrorClass::Internal, message@),
    {
        DbError::new(ErrorClass::Internal, message)
    }
}

/// Rows a statement returned. The rows themselves are held by whoever draws
/// them; what the window decides by is which rows they are and how many.
#[derive(Clone, Copy, PartialEq, Eq, Structural, Debug)]
pub struct Rows {
    pub id: u64,
    pub count: usize,
}

/// Who may do what to one relation, a line for each.
pub struct Grants {
    pub lines: Vec<String>,
}

/// Whether a schema has a relation of a name.
pub open spec fn schema_has(schema: Schema, name: Seq<char>) -> bool {
    exists|i: int|
        0 <= i < schema.relations@.len() && (#[trigger] schema.relations@[i]).reference.name@
            == name
}

/// Whether a catalog has a relation.
pub open spec fn catalog_has(snapshot: SchemaSnapshot, relation: (Seq<char>, Seq<char>)) -> bool {
    exists|i: int|
        0 <= i < snapshot.schemas@.len() && (#[trigger] snapshot.schemas@[i]).name@ == relation.0
            && schema_has(snapshot.schemas@[i], relation.1)
}

impl SchemaSnapshot {
    /// Whether the catalog has a relation.
    pub fn has(&self, relation: &RelationRef) -> (answer: bool)
        ensures
            answer == catalog_has(*self, relation.parts()),
    {
        let mut at: usize = 0;
        while at < self.schemas.len()
            invariant
                at <= self.schemas@.len(),
                forall|i: int|
                    0 <= i < at ==> !((#[trigger] self.schemas@[i]).name@ == relation.schema@
                        && schema_has(self.schemas@[i], relation.name@)),
            decreases self.schemas@.len() - at,
        {
            let schema = &self.schemas[at];
            if same(schema.name.as_str(), relation.schema.as_str()) && schema.has(
                relation.name.as_str(),
            ) {
                return true;
            }
            at += 1;
        }
        false
    }
}

impl Schema {
    /// Whether the schema has a relation of a name.
    pub(crate) fn has(&self, name: &str) -> (answer: bool)
        ensures
            answer == schema_has(*self, name@),
    {
        let mut at: usize = 0;
        while at < self.relations.len()
            invariant
                at <= self.relations@.len(),
                forall|i: int|
                    0 <= i < at ==> (#[trigger] self.relations@[i]).reference.name@ != name@,
            decreases self.relations@.len() - at,
        {
            if same(self.relations[at].reference.name.as_str(), name) {
                return true;
            }
            at += 1;
        }
        false
    }
}

} // verus!
