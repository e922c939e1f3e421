use assistant_backend::folder::RustFolder;
use assistant_backend::record::{duplicate_all, Record};
use assistant_backend::sorting::{insert_newest_first, sort_newest_first};

fn folder(id: &str, timestamp: u64) -> RustFolder {
    RustFolder {
        id: id.to_string(),
        name: format!("folder {}", id),
        timestamp,
        parent_id: None,
        is_expanded: true,
    }
}

fn ids(folders: &Vec<RustFolder>) -> Vec<String> {
    folders.iter().map(|f| f.id.clone()).collect()
}

#[test]
fn sorting_nothing_gives_nothing() {
    let sorted: Vec<RustFolder> = sort_newest_first(Vec::new());
    assert!(sorted.is_empty());
}

#[test]
fn sorting_orders_by_timestamp_descending() {
    let sorted = sort_newest_first(vec![folder("a", 1), folder("b", 3), folder("c", 2)]);
    assert_eq!(ids(&sorted), vec!["b", "c", "a"]);
}

#[test]
fn sorting_is_stable() {
    let sorted = sort_newest_first(vec![
        folder("a", 2),
        folder("b", 1),
        folder("c", 2),
        folder("d", 1),
        folder("e", 2),
    ]);
    assert_eq!(ids(&sorted), vec!["a", "c", "e", "b", "d"]);
}

#[test]
fn sorting_agrees_with_the_standard_stable_sort() {
    let mut seed: u64 = 42;
    for round in 0..50 {
        let mut input: Vec<RustFolder> = Vec::new();
        for i in 0..(round % 17) {
            seed = seed.wrapping_mul(6364136223846793005).wrapping_add(1442695040888963407);
            input.push(folder(&format!("{}", i), (seed >> 60) % 5));
        }
        let mut expected = duplicate_all(&input);
        expected.sort_by(|a, b| b.timestamp.cmp(&a.timestamp));
        assert_eq!(sort_newest_first(input), expected);
    }
}

#[test]
fn sorting_a_sorted_vector_changes_nothing() {
    let sorted = sort_newest_first(vec![folder("a", 9), folder("b", 9), folder("c", 4)]);
    assert_eq!(ids(&sorted), vec!["a", "b", "c"]);
}

#[test]
fn inserting_puts_a_record_in_front_of_the_first_that_is_not_newer() {
    let mut sorted = vec![folder("a", 9), folder("b", 5), folder("c", 5), folder("d", 1)];
    insert_newest_first(&mut sorted, folder("x", 5));
    assert_eq!(ids(&sorted), vec!["a", "x", "b", "c", "d"]);
    insert_newest_first(&mut sorted, folder("y", 0));
    assert_eq!(ids(&sorted), vec!["a", "x", "b", "c", "d", "y"]);
    insert_newest_first(&mut sorted, folder("z", 10));
    assert_eq!(ids(&sorted), vec!["z", "a", "x", "b", "c", "d", "y"]);
}

#[test]
fn a_record_answers_with_its_identifier_and_timestamp() {
    let f = folder("f7", 77);
    assert_eq!(f.id(), "f7");
    assert_eq!(f.timestamp(), 77);
    assert_eq!(f.duplicate(), f);
}
