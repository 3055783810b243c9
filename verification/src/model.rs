//! The data model: parsed tips, persisted entities, and the error taxonomy.

use vstd::prelude::*;

verus! {

/// One parsed record: the heading text and the lines that followed it.
#[derive(Debug, Clone)]
pub struct Tip {
    pub title: String,
    pub content: String,
}

/// A persisted, queryable record. The relational engine assigns `id` from its
/// auto-increment column (as decimal text); the flat-file engine stores an
/// empty-string placeholder, since it has no stable identity.
#[derive(Debug, Clone)]
pub struct Entity {
    pub id: String,
    pub title: String,
    pub content: String,
}

impl Tip {
    /// The mathematical value of a tip: its title and content character sequences.
    pub open spec fn model(self) -> (Seq<char>, Seq<char>) {
        (self.title@, self.content@)
    }
}

impl Entity {
    /// The mathematical value of an entity: id, title and content character sequences.
    pub open spec fn model(self) -> (Seq<char>, Seq<char>, Seq<char>) {
        (self.id@, self.title@, self.content@)
    }
}

/// The sequence of tip models underlying a vector of tips.
pub open spec fn tips_model(tips: Seq<Tip>) -> Seq<(Seq<char>, Seq<char>)> {
    tips.map_values(|t: Tip| t.model())
}

/// The sequence of entity models underlying a vector of entities.
pub open spec fn entities_model(es: Seq<Entity>) -> Seq<(Seq<char>, Seq<char>, Seq<char>)> {
    es.map_values(|e: Entity| e.model())
}

/// Failure to reverse the transport encoding of a fetched body.
#[derive(Debug, Clone, PartialEq, Eq, Structural)]
pub enum DecodeError {
    /// The payload (after stripping line-wrapping newlines) is not valid base64.
    InvalidBase64,
    /// The decoded bytes are not valid UTF-8.
    InvalidUtf8,
}

/// Failure of a storage operation. Both engines share this taxonomy.
#[derive(Debug, Clone)]
pub enum StorageError {
    /// The storage directory or file path could not be resolved.
    PathResolution(String),
    /// A read/write/connection failure reported by the engine.
    Engine(String),
    /// Flat-file engine only: the dataset file is absent on `random`.
    NotSynced,
    /// The active engine cannot perform the requested operation.
    Unsupported(String),
}

impl StorageError {
    /// A human-readable description, for callers that report errors.
    pub fn message(&self) -> (r: String)
        ensures
            match self {
                StorageError::PathResolution(m) => r@ == m@,
                StorageError::Engine(m) => r@ == m@,
                StorageError::NotSynced => r@ == "can't load tips from disk, try [sync] first"@,
                StorageError::Unsupported(m) => r@ == m@,
            },
    {
        match self {
            StorageError::PathResolution(m) => m.clone(),
            StorageError::Engine(m) => m.clone(),
            StorageError::NotSynced => "can't load tips from disk, try [sync] first".to_owned(),
            StorageError::Unsupported(m) => m.clone(),
        }
    }
}

} // verus!
