//! The key-value store of a workspace: its handle, and how its file is
//! opened.

use crate::models::Workspace;
use vstd::prelude::*;

verus! {

/// The handle on one workspace's key-value store.
#[derive(Debug)]
pub struct CursorDB {
    pub workspace: Workspace,
}

/// What stands where a workspace keeps its store.
#[derive(Debug)]
pub enum StoreFile {
    /// No file is there.
    Missing,
    /// A file is there and cannot be read.
    Unreadable,
    /// A file is there, with these bytes.
    Holds(Vec<u8>),
}

/// How to open a workspace's store.
#[derive(Debug, Clone, Copy, PartialEq, Eq, Structural)]
pub enum Opening {
    /// Nothing is there: make a new store.
    Create,
    /// What is there is no store: remove it and make a new one.
    Replace,
    /// A store is there: open it.
    Reuse,
}

/// The bytes that open every SQLite database file: the text
/// "SQLite format 3".
pub open spec fn store_magic() -> Seq<u8> {
    seq![
        83u8, 81u8, 76u8, 105u8, 116u8, 101u8, 32u8, 102u8, 111u8, 114u8, 109u8, 97u8, 116u8, 32u8,
        51u8,
    ]
}

/// Whether `bytes` open with the text "SQLite format 3".
pub fn is_store_image(bytes: &[u8]) -> (yes: bool)
    ensures
        yes == store_magic().is_prefix_of(bytes@),
{
    let magic: [u8; 15] = [83, 81, 76, 105, 116, 101, 32, 102, 111, 114, 109, 97, 116, 32, 51];
    if bytes.len() < 15 {
        return false;
    }
    let mut i: usize = 0;
    while i < 15
        invariant
            i <= 15,
            bytes@.len() >= 15,
            magic@ == store_magic(),
            forall|j: int| 0 <= j < i ==> bytes@[j] == magic@[j],
        decreases 15 - i,
    {
        if bytes[i] != magic[i] {
            return false;
        }
        i += 1;
    }
    true
}

impl CursorDB {
    /// The handle on the store of `workspace`.
    pub fn new(workspace: Workspace) -> (db: Self)
        ensures
            db.workspace == workspace,
    {
        Self { workspace }
    }

    /// How to open the store, given what stands in its place. A file that
    /// cannot be read, or that does not open with the bytes of a database,
    /// is replaced by an empty store.
    pub fn opening_for(file: &StoreFile) -> (opening: Opening)
        ensures
            opening == match *file {
                StoreFile::Missing => Opening::Create,
                StoreFile::Unreadable => Opening::Replace,
                StoreFile::Holds(bytes) => if store_magic().is_prefix_of(bytes@) {
                    Opening::Reuse
                } else {
                    Opening::Replace
                },
            },
    {
        match file {
            StoreFile::Missing => Opening::Create,
            StoreFile::Unreadable => Opening::Replace,
            StoreFile::Holds(bytes) => if is_store_image(bytes.as_slice()) {
                Opening::Reuse
            } else {
                Opening::Replace
            },
        }
    }
}

} // verus!
