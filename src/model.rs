use vstd::prelude::*;

verus! {

/// The abstract alias table: key to (destination, owner).
pub type Table = Map<Seq<char>, (Seq<char>, i32)>;

/// One row of the alias table.
#[derive(Debug, Clone, PartialEq, Eq)]
pub struct AliasRecord {
    pub key: String,
    pub destination: String,
    pub owner: i32,
}

/// A unit of work for the connection actor, carrying only plain data.
#[derive(Debug, Clone, PartialEq, Eq)]
pub enum Command {
    Resolve { key: String },
    Upsert { key: String, destination: String, owner: i32 },
    Delete { key: String, owner: i32 },
}

/// What the storage answers to one command.
#[derive(Debug, Clone, PartialEq, Eq)]
pub enum Outcome {
    /// The destination of the key looked up, if the key exists.
    Row(Option<String>),
    /// The number of rows a write touched.
    Affected(usize),
}

/// A failure reported by the underlying storage connection.
#[derive(Debug, Clone, PartialEq, Eq)]
pub enum StorageError {
    Query(String),
    /// A write that was expected to touch exactly one row touched this many.
    RowCount(usize),
}

/// Why a resolution failed.
#[derive(Debug, Clone, PartialEq, Eq)]
pub enum AliasSearchFailure {
    NoSuchAlias,
    Sql(StorageError),
    ActorUnavailable,
}

/// Why an upsert or a delete failed.
#[derive(Debug, Clone, PartialEq, Eq)]
pub enum MutationFailure {
    NotFoundOrNotOwned,
    Sql(StorageError),
    ActorUnavailable,
}

/// The key that a command is about.
pub open spec fn command_key(c: Command) -> Seq<char> {
    match c {
        Command::Resolve { key } => key@,
        Command::Upsert { key, .. } => key@,
        Command::Delete { key, .. } => key@,
    }
}

/// The key exists and belongs to `owner`.
pub open spec fn owns(t: Table, k: Seq<char>, owner: i32) -> bool {
    t.contains_key(k) && t[k].1 == owner
}

/// The table after a command has run on it.
pub open spec fn applied(t: Table, c: Command) -> Table {
    match c {
        Command::Resolve { .. } => t,
        Command::Upsert { key, destination, owner } => t.insert(key@, (destination@, owner)),
        Command::Delete { key, owner } => if owns(t, key@, owner) {
            t.remove(key@)
        } else {
            t
        },
    }
}

/// `o` is what the table `t` answers to the command `c`.
pub open spec fn answers(t: Table, c: Command, o: Outcome) -> bool {
    match c {
        Command::Resolve { key } => match o {
            Outcome::Row(Some(d)) => t.contains_key(key@) && t[key@].0 == d@,
            Outcome::Row(None) => !t.contains_key(key@),
            Outcome::Affected(_) => false,
        },
        Command::Upsert { .. } => o == Outcome::Affected(1),
        Command::Delete { key, owner } => o == Outcome::Affected(
            if owns(t, key@, owner) { 1 } else { 0 },
        ),
    }
}

/// The table after a sequence of commands ran on it in order.
pub open spec fn replay(t: Table, cs: Seq<Command>) -> Table
    decreases cs.len(),
{
    if cs.len() == 0 {
        t
    } else {
        replay(applied(t, cs[0]), cs.drop_first())
    }
}

} // verus!

verus! {

/// `r` is what resolving `k` against the table `t` gives.
pub open spec fn resolves_to(t: Table, k: Seq<char>, r: Result<String, AliasSearchFailure>) -> bool {
    match r {
        Ok(d) => t.contains_key(k) && t[k].0 == d@,
        Err(AliasSearchFailure::NoSuchAlias) => !t.contains_key(k),
        Err(_) => false,
    }
}

} // verus!
