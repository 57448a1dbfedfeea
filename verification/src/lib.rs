//! Assembly of portable flashcard-deck exchange packages.
//!
//! A [`Package`] owns an ordered list of decks and an ordered list of media
//! file paths.  One write operation builds a relational snapshot of the decks
//! inside a single transaction, assigns every media file a numeric slot,
//! and bundles the snapshot, a slot manifest, and the media payloads into one
//! zip-family archive.

pub mod archive;
pub mod db;
pub mod deck;
pub mod error;
pub mod idgen;
pub mod media;
pub mod package;

pub use deck::Deck;
pub use deck::RowInsert;
pub use deck::RowParam;
pub use deck::SqlValue;
pub use error::PkgError;
pub use idgen::IdGenerator;
pub use package::DbScript;
pub use package::Package;
