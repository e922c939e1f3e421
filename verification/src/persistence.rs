//! The vocabulary shared with the storage backend: which files hold which
//! collection, what a read can come back with, what a write can fail with, and
//! how failures are reported to the caller.

use vstd::prelude::*;
use vstd::string::StringExecFns;
use crate::text::join;

verus! {

/// The three documents kept in the application's data directory.
#[derive(Clone, Copy, Debug, PartialEq, Eq, Structural)]
pub enum Collection {
    Settings,
    Chats,
    Folders,
}

impl Collection {
    /// The logical name of the collection.
    pub open spec fn spec_stem(self) -> Seq<char> {
        match self {
            Collection::Settings => "settings"@,
            Collection::Chats => "chats"@,
            Collection::Folders => "folders"@,
        }
    }

    /// How a single record of the collection is called in messages.
    pub open spec fn spec_label(self) -> Seq<char> {
        match self {
            Collection::Settings => "Settings"@,
            Collection::Chats => "Chat"@,
            Collection::Folders => "Folder"@,
        }
    }

    /// The file below the data directory that holds the collection.
    pub open spec fn spec_file_name(self) -> Seq<char> {
        self.spec_stem() + ".json"@
    }

    pub fn stem(self) -> (stem: &'static str)
        ensures
            stem@ == self.spec_stem(),
    {
        match self {
            Collection::Settings => "settings",
            Collection::Chats => "chats",
            Collection::Folders => "folders",
        }
    }

    pub fn label(self) -> (label: &'static str)
        ensures
            label@ == self.spec_label(),
    {
        match self {
            Collection::Settings => "Settings",
            Collection::Chats => "Chat",
            Collection::Folders => "Folder",
        }
    }

    pub fn file_name(self) -> (name: String)
        ensures
            name@ == self.spec_file_name(),
    {
        join(self.stem(), ".json")
    }
}

/// What reading a collection's file came back with.
pub enum LoadOutcome<V> {
    /// There is no such file yet.
    Missing,
    /// The file exists but could not be read.
    Unreadable,
    /// The file was read but does not hold a document of the expected shape.
    Malformed,
    /// The file held this value.
    Parsed(V),
}

/// What writing a collection's file came back with. Failures carry the text of
/// the underlying error.
pub enum PersistOutcome {
    Written,
    /// The data directory is not known.
    NoDataDirectory,
    /// The data directory could not be created.
    DirectoryFailed(String),
    /// The directory that should hold the file could not be created.
    ParentFailed(String),
    /// The value could not be turned into a document.
    SerializeFailed(String),
    /// The document could not be written.
    WriteFailed(String),
}

/// The model of a `PersistOutcome`.
pub enum PersistOutcomeView {
    Written,
    NoDataDirectory,
    DirectoryFailed(Seq<char>),
    ParentFailed(Seq<char>),
    SerializeFailed(Seq<char>),
    WriteFailed(Seq<char>),
}

impl View for PersistOutcome {
    type V = PersistOutcomeView;

    open spec fn view(&self) -> PersistOutcomeView {
        match self {
            PersistOutcome::Written => PersistOutcomeView::Written,
            PersistOutcome::NoDataDirectory => PersistOutcomeView::NoDataDirectory,
            PersistOutcome::DirectoryFailed(e) => PersistOutcomeView::DirectoryFailed(e@),
            PersistOutcome::ParentFailed(e) => PersistOutcomeView::ParentFailed(e@),
            PersistOutcome::SerializeFailed(e) => PersistOutcomeView::SerializeFailed(e@),
            PersistOutcome::WriteFailed(e) => PersistOutcomeView::WriteFailed(e@),
        }
    }
}

/// Why a repository operation failed. Each variant carries the message shown
/// to the user.
#[derive(Debug, PartialEq, Eq)]
pub enum StoreError {
    /// A directory or file could not be created or written.
    Io(String),
    /// The value could not be turned into a document.
    Serialization(String),
    /// No record has the identifier that was asked for.
    NotFound(String),
}

/// The model of a `StoreError`.
pub enum StoreErrorView {
    Io(Seq<char>),
    Serialization(Seq<char>),
    NotFound(Seq<char>),
}

impl View for StoreError {
    type V = StoreErrorView;

    open spec fn view(&self) -> StoreErrorView {
        match self {
            StoreError::Io(m) => StoreErrorView::Io(m@),
            StoreError::Serialization(m) => StoreErrorView::Serialization(m@),
            StoreError::NotFound(m) => StoreErrorView::NotFound(m@),
        }
    }
}

impl StoreErrorView {
    pub open spec fn message(self) -> Seq<char> {
        match self {
            StoreErrorView::Io(m) => m,
            StoreErrorView::Serialization(m) => m,
            StoreErrorView::NotFound(m) => m,
        }
    }
}

impl StoreError {
    /// The message shown to the user.
    pub fn message(&self) -> (message: &String)
        ensures
            message@ == self@.message(),
    {
        match self {
            StoreError::Io(m) => m,
            StoreError::Serialization(m) => m,
            StoreError::NotFound(m) => m,
        }
    }
}

/// The message for a delete that found no record with identifier `id`.
pub open spec fn not_found_message(collection: Collection, id: Seq<char>) -> Seq<char> {
    collection.spec_label() + " with ID "@ + id + " not found"@
}

/// The error for a delete that found no record with identifier `id`.
pub fn not_found(collection: Collection, id: &str) -> (error: StoreError)
    ensures
        error@ == StoreErrorView::NotFound(not_found_message(collection, id@)),
{
    let mut message = join(collection.label(), " with ID ");
    message.append(id);
    message.append(" not found");
    StoreError::NotFound(message)
}

/// Marks the messages of a write that follows a deletion.
pub open spec fn phase(after_delete: bool) -> Seq<char> {
    if after_delete {
        " after deletion"@
    } else {
        ""@
    }
}

/// How the outcome of a write is reported: success for `Written`, otherwise
/// the error with its message, which always ends in the underlying error text
/// where there is one.
pub open spec fn persist_report(
    collection: Collection,
    after_delete: bool,
    outcome: PersistOutcomeView,
) -> Result<(), StoreErrorView> {
    match outcome {
        PersistOutcomeView::Written => Ok(()),
        PersistOutcomeView::NoDataDirectory => Err(
            StoreErrorView::Io("Failed to get app data directory"@),
        ),
        PersistOutcomeView::DirectoryFailed(e) => Err(
            StoreErrorView::Io("Failed to create app data directory: "@ + e),
        ),
        PersistOutcomeView::ParentFailed(e) => Err(
            StoreErrorView::Io("Failed to create parent directory: "@ + e),
        ),
        PersistOutcomeView::SerializeFailed(e) => Err(
            StoreErrorView::Serialization(
                "Failed to serialize "@ + collection.spec_stem() + phase(after_delete) + ": "@ + e,
            ),
        ),
        PersistOutcomeView::WriteFailed(e) => Err(
            StoreErrorView::Io(
                "Failed to write "@ + collection.spec_stem() + " file"@ + phase(after_delete)
                    + ": "@ + e,
            ),
        ),
    }
}

/// The model of a `Result<(), StoreError>`.
pub open spec fn report_view(report: Result<(), StoreError>) -> Result<(), StoreErrorView> {
    match report {
        Ok(()) => Ok(()),
        Err(e) => Err(e@),
    }
}

/// Turns the outcome of writing a collection into what the caller is told.
/// `after_delete` says that the write followed a deletion.
pub fn persist_result(collection: Collection, after_delete: bool, outcome: PersistOutcome) -> (report:
    Result<(), StoreError>)
    ensures
        report_view(report) == persist_report(collection, after_delete, outcome@),
{
    let phase_text = if after_delete {
        " after deletion"
    } else {
        ""
    };
    match outcome {
        PersistOutcome::Written => Ok(()),
        PersistOutcome::NoDataDirectory => Err(
            StoreError::Io(String::from_str("Failed to get app data directory")),
        ),
        PersistOutcome::DirectoryFailed(e) => Err(
            StoreError::Io(join("Failed to create app data directory: ", e.as_str())),
        ),
        PersistOutcome::ParentFailed(e) => Err(
            StoreError::Io(join("Failed to create parent directory: ", e.as_str())),
        ),
        PersistOutcome::SerializeFailed(e) => {
            let mut message = join("Failed to serialize ", collection.stem());
            message.append(phase_text);
            message.append(": ");
            message.append(e.as_str());
            Err(StoreError::Serialization(message))
        },
        PersistOutcome::WriteFailed(e) => {
            let mut message = join("Failed to write ", collection.stem());
            message.append(" file");
            message.append(phase_text);
            message.append(": ");
            message.append(e.as_str());
            Err(StoreError::Io(message))
        },
    }
}

} // verus!
