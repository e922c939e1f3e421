use assistant_backend::chat::{ChatMessage, ChatMode, RustSavedChat, Sender};
use assistant_backend::folder::RustFolder;
use assistant_backend::persistence::{LoadOutcome, StoreError};
use assistant_backend::repository::Repository;

fn chat(id: &str, timestamp: u64, title: Option<&str>) -> RustSavedChat {
    RustSavedChat {
        id: id.to_string(),
        timestamp,
        mode: ChatMode::Action,
        messages: Vec::new(),
        title: title.map(|t| t.to_string()),
    }
}

fn folder(id: &str, name: &str, timestamp: u64) -> RustFolder {
    RustFolder {
        id: id.to_string(),
        name: name.to_string(),
        timestamp,
        parent_id: None,
        is_expanded: false,
    }
}

fn ids(chats: &Vec<RustSavedChat>) -> Vec<String> {
    chats.iter().map(|c| c.id.clone()).collect()
}

fn newest_first(stamps: &Vec<u64>) -> bool {
    stamps.windows(2).all(|pair| pair[0] >= pair[1])
}

#[test]
fn saving_a_chat_twice_keeps_one_record() {
    let mut repo: Repository<RustSavedChat> = Repository::new();
    repo.upsert(chat("c1", 100, None));
    repo.upsert(chat("c1", 200, Some("X")));
    let all = repo.snapshot();
    assert_eq!(all.len(), 1);
    assert_eq!(all[0].timestamp, 200);
    assert_eq!(all[0].title, Some("X".to_string()));
}

#[test]
fn the_same_upsert_twice_is_the_same_as_once() {
    let mut once: Repository<RustSavedChat> = Repository::new();
    let mut twice: Repository<RustSavedChat> = Repository::new();
    for repo in [&mut once, &mut twice] {
        repo.upsert(chat("a", 10, None));
        repo.upsert(chat("b", 30, None));
        repo.upsert(chat("c", 20, None));
    }
    once.upsert(chat("b", 5, Some("moved")));
    twice.upsert(chat("b", 5, Some("moved")));
    twice.upsert(chat("b", 5, Some("moved")));
    assert_eq!(once.snapshot(), twice.snapshot());
    let with_b: Vec<&RustSavedChat> = twice.snapshot().iter().filter(|c| c.id == "b").collect();
    assert_eq!(with_b.len(), 1);
    assert_eq!(*with_b[0], chat("b", 5, Some("moved")));
}

#[test]
fn a_new_repository_is_empty_and_asks_for_a_load() {
    let repo: Repository<RustSavedChat> = Repository::new();
    assert!(!repo.is_loaded());
    assert!(repo.get_all().is_none());
    assert!(repo.snapshot().is_empty());
}

#[test]
fn records_come_out_newest_first_whatever_the_order_of_insertion() {
    let mut repo: Repository<RustSavedChat> = Repository::new();
    repo.upsert(chat("old", 1, None));
    repo.upsert(chat("new", 300, None));
    repo.upsert(chat("mid", 20, None));
    let all = repo.get_all().unwrap();
    assert_eq!(ids(&all), vec!["new", "mid", "old"]);
    let stamps: Vec<u64> = all.iter().map(|c| c.timestamp).collect();
    assert!(newest_first(&stamps));
}

#[test]
fn load_sorts_what_the_file_held() {
    let mut repo: Repository<RustSavedChat> = Repository::new();
    let all = repo.load(LoadOutcome::Parsed(vec![
        chat("a", 5, None),
        chat("b", 50, None),
        chat("c", 7, None),
        chat("d", 50, None),
    ]));
    assert_eq!(ids(&all), vec!["b", "d", "c", "a"]);
    assert_eq!(ids(repo.snapshot()), vec!["b", "d", "c", "a"]);
    assert!(repo.is_loaded());
    assert_eq!(ids(&repo.get_all().unwrap()), vec!["b", "d", "c", "a"]);
}

#[test]
fn load_of_a_missing_unreadable_or_malformed_file_gives_no_records() {
    for outcome in [LoadOutcome::Missing, LoadOutcome::Unreadable, LoadOutcome::Malformed] {
        let mut repo: Repository<RustFolder> = Repository::new();
        let all = repo.load(outcome);
        assert!(all.is_empty());
        assert!(repo.snapshot().is_empty());
        assert!(!repo.is_loaded());
    }
}

#[test]
fn load_keeps_what_is_already_held() {
    let mut repo: Repository<RustSavedChat> = Repository::new();
    repo.upsert(chat("kept", 9, None));
    let all = repo.load(LoadOutcome::Parsed(vec![chat("from-disk", 1, None)]));
    assert_eq!(ids(&all), vec!["kept"]);
    assert_eq!(ids(repo.snapshot()), vec!["kept"]);
}

#[test]
fn upsert_replaces_in_place_and_sorts_again() {
    let mut repo: Repository<RustSavedChat> = Repository::new();
    repo.upsert(chat("a", 30, None));
    repo.upsert(chat("b", 20, None));
    repo.upsert(chat("c", 10, None));
    repo.upsert(chat("c", 40, Some("now first")));
    assert_eq!(ids(repo.snapshot()), vec!["c", "a", "b"]);
    assert_eq!(repo.snapshot()[0].title, Some("now first".to_string()));
    assert_eq!(repo.snapshot().len(), 3);
}

#[test]
fn records_with_equal_timestamps_keep_their_order() {
    let mut repo: Repository<RustSavedChat> = Repository::new();
    repo.upsert(chat("first", 7, None));
    repo.upsert(chat("second", 7, None));
    repo.upsert(chat("third", 7, None));
    assert_eq!(ids(repo.snapshot()), vec!["first", "second", "third"]);
    repo.upsert(chat("second", 7, Some("changed")));
    assert_eq!(ids(repo.snapshot()), vec!["first", "second", "third"]);
}

#[test]
fn delete_removes_the_record_and_keeps_the_order() {
    let mut repo: Repository<RustSavedChat> = Repository::new();
    repo.upsert(chat("a", 30, None));
    repo.upsert(chat("b", 20, None));
    repo.upsert(chat("c", 10, None));
    assert_eq!(repo.delete(&"b".to_string()), Ok(()));
    assert_eq!(ids(repo.snapshot()), vec!["a", "c"]);
}

#[test]
fn delete_removes_every_record_with_the_identifier() {
    let mut repo: Repository<RustSavedChat> = Repository::new();
    repo.load(LoadOutcome::Parsed(vec![chat("x", 1, None), chat("y", 2, None), chat("x", 3, None)]));
    assert_eq!(repo.delete(&"x".to_string()), Ok(()));
    assert_eq!(ids(repo.snapshot()), vec!["y"]);
}

#[test]
fn delete_of_an_absent_identifier_changes_nothing_and_fails() {
    let mut repo: Repository<RustSavedChat> = Repository::new();
    repo.upsert(chat("a", 30, None));
    repo.upsert(chat("b", 20, None));
    let before = ids(repo.snapshot());
    let result = repo.delete(&"zzz".to_string());
    assert_eq!(result, Err(StoreError::NotFound("Chat with ID zzz not found".to_string())));
    assert_eq!(ids(repo.snapshot()), before);
}

#[test]
fn delete_on_an_empty_repository_fails() {
    let mut repo: Repository<RustFolder> = Repository::new();
    let result = repo.delete(&"f1".to_string());
    assert_eq!(result, Err(StoreError::NotFound("Folder with ID f1 not found".to_string())));
    assert!(repo.snapshot().is_empty());
}

#[test]
fn deleting_the_last_record_empties_the_repository() {
    let mut repo: Repository<RustFolder> = Repository::new();
    repo.upsert(folder("f1", "Work", 1));
    assert_eq!(repo.delete(&"f1".to_string()), Ok(()));
    assert!(!repo.is_loaded());
    assert!(repo.get_all().is_none());
}

#[test]
fn a_fresh_repository_that_loads_a_snapshot_holds_the_same_records() {
    let mut repo: Repository<RustSavedChat> = Repository::new();
    repo.upsert(chat("a", 3, Some("A")));
    repo.upsert(chat("b", 9, None));
    repo.upsert(chat("c", 3, Some("C")));
    repo.delete(&"b".to_string()).unwrap();
    let written: Vec<RustSavedChat> = repo.snapshot().iter().map(|c| c.clone()).collect();
    let mut fresh: Repository<RustSavedChat> = Repository::new();
    let read = fresh.load(LoadOutcome::Parsed(written));
    assert_eq!(&read, repo.snapshot());
    assert_eq!(fresh.snapshot(), repo.snapshot());
}

#[test]
fn get_all_returns_a_copy() {
    let mut repo: Repository<RustSavedChat> = Repository::new();
    let mut with_messages = chat("a", 1, Some("t"));
    with_messages.messages.push(ChatMessage { sender: Sender::User, content: "hi".to_string() });
    with_messages.messages.push(ChatMessage {
        sender: Sender::Assistant,
        content: "hello".to_string(),
    });
    repo.upsert(with_messages);
    let mut copy = repo.get_all().unwrap();
    assert_eq!(&copy, repo.snapshot());
    copy[0].title = None;
    copy[0].messages.clear();
    assert_eq!(repo.snapshot()[0].title, Some("t".to_string()));
    assert_eq!(repo.snapshot()[0].messages.len(), 2);
    assert_eq!(repo.snapshot()[0].messages[1].sender, Sender::Assistant);
}

#[test]
fn folders_are_kept_like_chats() {
    let mut repo: Repository<RustFolder> = Repository::new();
    repo.upsert(folder("f1", "Work", 10));
    repo.upsert(folder("f2", "Home", 20));
    let mut child = folder("f3", "Taxes", 15);
    child.parent_id = Some("f2".to_string());
    child.is_expanded = true;
    repo.upsert(child);
    let all = repo.get_all().unwrap();
    let names: Vec<&str> = all.iter().map(|f| f.name.as_str()).collect();
    assert_eq!(names, vec!["Home", "Taxes", "Work"]);
    assert_eq!(all[1].parent_id, Some("f2".to_string()));
    assert!(all[1].is_expanded);
    repo.upsert(folder("f1", "Work, renamed", 10));
    assert_eq!(repo.snapshot()[2].name, "Work, renamed");
    assert_eq!(repo.snapshot().len(), 3);
}

#[test]
fn the_largest_timestamp_sorts_first() {
    let mut repo: Repository<RustSavedChat> = Repository::new();
    repo.upsert(chat("zero", 0, None));
    repo.upsert(chat("max", u64::MAX, None));
    assert_eq!(ids(repo.snapshot()), vec!["max", "zero"]);
}
