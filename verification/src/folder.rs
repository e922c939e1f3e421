//! Folders, which arrange saved conversations into a tree.

use vstd::prelude::*;
use crate::text::{clone_optional_text, optional_text};
use crate::persistence::Collection;
use crate::record::Record;

verus! {

/// A folder as it is kept between sessions. `parent_id` names another folder;
/// nothing here checks that such a folder exists.
#[derive(Debug, PartialEq, Eq)]
pub struct RustFolder {
    pub id: String,
    pub name: String,
    /// Milliseconds since the epoch.
    pub timestamp: u64,
    pub parent_id: Option<String>,
    pub is_expanded: bool,
}

/// The model of a `RustFolder`.
pub struct FolderView {
    pub id: Seq<char>,
    pub name: Seq<char>,
    pub timestamp: u64,
    pub parent_id: Option<Seq<char>>,
    pub is_expanded: bool,
}

impl View for RustFolder {
    type V = FolderView;

    open spec fn view(&self) -> FolderView {
        FolderView {
            id: self.id@,
            name: self.name@,
            timestamp: self.timestamp,
            parent_id: optional_text(self.parent_id),
            is_expanded: self.is_expanded,
        }
    }
}

impl Clone for RustFolder {
    fn clone(&self) -> (copy: Self)
        ensures
            copy@ == self@,
    {
        RustFolder {
            id: self.id.clone(),
            name: self.name.clone(),
            timestamp: self.timestamp,
            parent_id: clone_optional_text(&self.parent_id),
            is_expanded: self.is_expanded,
        }
    }
}

impl Record for RustFolder {
    open spec fn key_of(v: FolderView) -> Seq<char> {
        v.id
    }

    open spec fn stamp_of(v: FolderView) -> u64 {
        v.timestamp
    }

    open spec fn collection() -> Collection {
        Collection::Folders
    }

    fn id(&self) -> (id: &String) {
        &self.id
    }

    fn timestamp(&self) -> (stamp: u64) {
        self.timestamp
    }

    fn duplicate(&self) -> (copy: Self) {
        self.clone()
    }

    fn kind() -> (kind: Collection) {
        Collection::Folders
    }
}

} // verus!
