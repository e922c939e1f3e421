use assistant_backend::chat::{ChatMode, RustSavedChat, Sender};
use assistant_backend::folder::RustFolder;
use assistant_backend::persistence::{
    not_found, persist_result, Collection, PersistOutcome, StoreError,
};
use assistant_backend::record::Record;
use assistant_backend::system::get_memory_info;
use assistant_backend::text::{chars_of, clone_texts, contains, join, same_text};

#[test]
fn each_collection_has_its_file() {
    assert_eq!(Collection::Settings.file_name(), "settings.json");
    assert_eq!(Collection::Chats.file_name(), "chats.json");
    assert_eq!(Collection::Folders.file_name(), "folders.json");
    assert_eq!(Collection::Settings.stem(), "settings");
    assert_eq!(Collection::Chats.stem(), "chats");
    assert_eq!(Collection::Folders.stem(), "folders");
    assert_eq!(Collection::Settings.label(), "Settings");
    assert_eq!(Collection::Chats.label(), "Chat");
    assert_eq!(Collection::Folders.label(), "Folder");
}

#[test]
fn records_know_their_collection() {
    assert_eq!(RustSavedChat::kind(), Collection::Chats);
    assert_eq!(RustFolder::kind(), Collection::Folders);
}

#[test]
fn a_successful_write_is_reported_as_success() {
    assert_eq!(persist_result(Collection::Chats, false, PersistOutcome::Written), Ok(()));
    assert_eq!(persist_result(Collection::Settings, true, PersistOutcome::Written), Ok(()));
}

#[test]
fn a_failed_write_carries_the_systems_message() {
    let result = persist_result(
        Collection::Chats,
        false,
        PersistOutcome::WriteFailed("disk full".to_string()),
    );
    assert_eq!(result, Err(StoreError::Io("Failed to write chats file: disk full".to_string())));
    let result = persist_result(
        Collection::Folders,
        true,
        PersistOutcome::WriteFailed("read-only file system".to_string()),
    );
    assert_eq!(
        result,
        Err(StoreError::Io(
            "Failed to write folders file after deletion: read-only file system".to_string()
        ))
    );
    let result = persist_result(
        Collection::Settings,
        false,
        PersistOutcome::WriteFailed("denied".to_string()),
    );
    assert_eq!(result, Err(StoreError::Io("Failed to write settings file: denied".to_string())));
}

#[test]
fn a_value_that_cannot_be_serialized_is_a_serialization_error() {
    let result = persist_result(
        Collection::Settings,
        false,
        PersistOutcome::SerializeFailed("key must be a string".to_string()),
    );
    assert_eq!(
        result,
        Err(StoreError::Serialization(
            "Failed to serialize settings: key must be a string".to_string()
        ))
    );
    let result = persist_result(
        Collection::Chats,
        true,
        PersistOutcome::SerializeFailed("bad".to_string()),
    );
    assert_eq!(
        result,
        Err(StoreError::Serialization("Failed to serialize chats after deletion: bad".to_string()))
    );
}

#[test]
fn directory_failures_are_io_errors() {
    assert_eq!(
        persist_result(Collection::Chats, false, PersistOutcome::NoDataDirectory),
        Err(StoreError::Io("Failed to get app data directory".to_string()))
    );
    assert_eq!(
        persist_result(
            Collection::Chats,
            false,
            PersistOutcome::DirectoryFailed("permission denied".to_string())
        ),
        Err(StoreError::Io("Failed to create app data directory: permission denied".to_string()))
    );
    assert_eq!(
        persist_result(
            Collection::Folders,
            true,
            PersistOutcome::ParentFailed("no space".to_string())
        ),
        Err(StoreError::Io("Failed to create parent directory: no space".to_string()))
    );
}

#[test]
fn errors_give_their_message() {
    assert_eq!(StoreError::Io("a".to_string()).message(), "a");
    assert_eq!(StoreError::Serialization("b".to_string()).message(), "b");
    assert_eq!(StoreError::NotFound("c".to_string()).message(), "c");
    assert_eq!(not_found(Collection::Chats, "c9").message(), "Chat with ID c9 not found");
    assert_eq!(
        not_found(Collection::Folders, ""),
        StoreError::NotFound("Folder with ID  not found".to_string())
    );
}

#[test]
fn senders_and_modes_have_names() {
    assert_eq!(Sender::User.name(), "user");
    assert_eq!(Sender::Assistant.name(), "assistant");
    assert_eq!(Sender::from_name("user"), Some(Sender::User));
    assert_eq!(Sender::from_name("assistant"), Some(Sender::Assistant));
    assert_eq!(Sender::from_name("User"), None);
    assert_eq!(Sender::from_name(""), None);
    assert_eq!(ChatMode::Action.name(), "action");
    assert_eq!(ChatMode::Walkthrough.name(), "walkthrough");
    assert_eq!(ChatMode::from_name("action"), Some(ChatMode::Action));
    assert_eq!(ChatMode::from_name("walkthrough"), Some(ChatMode::Walkthrough));
    assert_eq!(ChatMode::from_name("walk"), None);
    for sender in [Sender::User, Sender::Assistant] {
        assert_eq!(Sender::from_name(sender.name()), Some(sender));
    }
    for mode in [ChatMode::Action, ChatMode::Walkthrough] {
        assert_eq!(ChatMode::from_name(mode.name()), Some(mode));
    }
}

#[test]
fn memory_is_reported_in_kilobytes() {
    let info = get_memory_info();
    assert_eq!(info.total_mem, 16777216);
    assert_eq!(info.free_mem, 8388608);
}

#[test]
fn text_is_its_characters() {
    assert_eq!(chars_of("a\u{e9}\u{1f600}"), vec!['a', '\u{e9}', '\u{1f600}']);
    assert!(chars_of("").is_empty());
    assert_eq!(join("ab", "cd"), "abcd");
    assert_eq!(join("", ""), "");
    assert_eq!(clone_texts(&vec!["x".to_string(), "".to_string()]), vec!["x", ""]);
}

#[test]
fn texts_are_compared_character_by_character() {
    assert!(same_text("", ""));
    assert!(same_text("abc", "abc"));
    assert!(!same_text("abc", "abd"));
    assert!(!same_text("abc", "ab"));
    assert!(!same_text("", "a"));
}

#[test]
fn a_text_is_found_where_it_occurs() {
    assert!(contains("No such file or directory", "such"));
    assert!(contains("abc", ""));
    assert!(contains("", ""));
    assert!(contains("abc", "abc"));
    assert!(contains("abc", "c"));
    assert!(contains("aab", "ab"));
    assert!(!contains("abc", "abcd"));
    assert!(!contains("", "a"));
    assert!(!contains("abc", "ac"));
    assert!(!contains("Permission", "permission"));
    for (haystack, needle) in [("ababab", "bab"), ("xyz", "yz"), ("xyz", "zy"), ("\u{e9}t\u{e9}", "t\u{e9}")] {
        assert_eq!(contains(haystack, needle), haystack.contains(needle));
    }
}
