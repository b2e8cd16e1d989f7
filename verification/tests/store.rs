use memo::store::AddOutcome;
use memo::store::DeleteOutcome;
use memo::store::MemoEntry;
use memo::store::MemoStore;

fn entry(name: &str, text: &str) -> MemoEntry {
    MemoEntry { name: name.to_string(), text: text.to_string() }
}

fn words(ws: &[&str]) -> Vec<String> {
    ws.iter().map(|w| w.to_string()).collect()
}

#[test]
fn add_to_empty_store_then_list_one_line() {
    let mut s = MemoStore::new();
    let out = s.add(&words(&["Buy", "milk"]));
    assert_eq!(
        out,
        AddOutcome::Added { file_name: "1.txt".to_string(), text: "Buy milk".to_string() }
    );
    assert_eq!(s.list(), vec!["1. Buy milk".to_string()]);
}

#[test]
fn add_then_show_returns_same_text() {
    let mut s = MemoStore { entries: vec![entry("1.txt", "first"), entry("2.txt", "second")] };
    let out = s.add(&words(&["hello", "world"]));
    assert!(matches!(out, AddOutcome::Added { .. }));
    let lines = s.list();
    assert!(lines.iter().any(|l| l.ends_with("hello world")));
    assert_eq!(s.show(3), Some("hello world".to_string()));
}

#[test]
fn add_after_last_ordinal_five_creates_six() {
    let mut s = MemoStore { entries: vec![entry("2.txt", "a"), entry("5.txt", "b")] };
    let out = s.add(&words(&["x"]));
    assert_eq!(out, AddOutcome::Added { file_name: "6.txt".to_string(), text: "x".to_string() });
    assert_eq!(s.count(), 3);
}

#[test]
fn add_without_words_reports_usage_and_changes_nothing() {
    let mut s = MemoStore { entries: vec![entry("1.txt", "a")] };
    let out = s.add(&words(&[]));
    assert_eq!(out, AddOutcome::Usage);
    assert_eq!(s.count(), 1);
    assert_eq!(s.enumerate(), vec!["1".to_string()]);
}

#[test]
fn add_with_corrupt_last_entry_heals_then_succeeds() {
    let mut s = MemoStore { entries: vec![entry("1.txt", "a"), entry("garbage.md", "b")] };
    let out = s.add(&words(&["new", "memo"]));
    assert_eq!(out, AddOutcome::RemovedCorrupt { file_name: "garbage.md".to_string() });
    assert_eq!(s.count(), 1);
    let out2 = s.add(&words(&["new", "memo"]));
    assert_eq!(
        out2,
        AddOutcome::Added { file_name: "2.txt".to_string(), text: "new memo".to_string() }
    );
    assert_eq!(s.count(), 2);
}

#[test]
fn add_treats_out_of_range_ordinal_as_corrupt() {
    let big = format!("{}9.txt", usize::MAX);
    let mut s = MemoStore { entries: vec![entry(&big, "a")] };
    let out = s.add(&words(&["x"]));
    assert_eq!(out, AddOutcome::RemovedCorrupt { file_name: big });
    assert_eq!(s.count(), 0);
}

#[test]
fn resolve_out_of_range_reports_not_found_and_mutates_nothing() {
    let s = MemoStore { entries: vec![entry("4.txt", "a")] };
    let before = s.enumerate();
    assert_eq!(s.resolve(0), None);
    assert_eq!(s.resolve(2), None);
    assert_eq!(s.resolve(usize::MAX), None);
    assert_eq!(s.resolve(1), Some("4".to_string()));
    assert_eq!(s.enumerate(), before);
}

#[test]
fn delete_shrinks_enumeration_and_drops_text() {
    let mut s = MemoStore {
        entries: vec![entry("1.txt", "keep one"), entry("2.txt", "drop me"), entry(
            "3.txt",
            "keep two",
        )],
    };
    let out = s.delete(2);
    assert_eq!(out, DeleteOutcome::Deleted { file_name: "2.txt".to_string() });
    assert_eq!(s.enumerate().len(), 2);
    assert!(s.list().iter().all(|l| !l.contains("drop me")));
    assert_eq!(s.show(1), Some("keep one".to_string()));
    assert_eq!(s.show(2), Some("keep two".to_string()));
}

#[test]
fn delete_out_of_range_reports_not_found() {
    let mut s = MemoStore { entries: vec![entry("1.txt", "a"), entry("2.txt", "b")] };
    let before = s.enumerate();
    assert_eq!(s.delete(0), DeleteOutcome::NotFound);
    assert_eq!(s.delete(3), DeleteOutcome::NotFound);
    assert_eq!(s.enumerate(), before);
}

#[test]
fn delete_single_memo_then_no_memos() {
    let mut s = MemoStore { entries: vec![entry("1.txt", "only")] };
    let out = s.delete(1);
    assert_eq!(out, DeleteOutcome::Deleted { file_name: "1.txt".to_string() });
    assert!(s.list().is_empty());
    assert_eq!(s.count(), 0);
}

#[test]
fn delete_names_backing_file_from_base_name() {
    let mut s = MemoStore { entries: vec![entry("7.md", "odd extension")] };
    let out = s.delete(1);
    assert_eq!(out, DeleteOutcome::Deleted { file_name: "7.txt".to_string() });
}

#[test]
fn show_out_of_range_on_one_memo_store() {
    let s = MemoStore { entries: vec![entry("1.txt", "only")] };
    assert_eq!(s.show(2), None);
    assert_eq!(s.show(0), None);
    assert_eq!(s.show(1), Some("only".to_string()));
}

#[test]
fn clean_removes_every_entry_by_stored_name() {
    let mut s = MemoStore { entries: vec![entry("a.md", "x"), entry("2.txt", "y")] };
    let removed = s.clean();
    assert_eq!(removed, vec!["a.md".to_string(), "2.txt".to_string()]);
    assert_eq!(s.count(), 0);
    assert!(s.list().is_empty());
    assert!(s.enumerate().is_empty());
}

#[test]
fn queries_are_idempotent_without_mutation() {
    let s = MemoStore { entries: vec![entry("1.txt", "a"), entry("9.log", "b")] };
    assert_eq!(s.list(), s.list());
    assert_eq!(s.enumerate(), s.enumerate());
    assert_eq!(s.resolve(2), s.resolve(2));
    assert_eq!(s.show(2), s.show(2));
}

#[test]
fn enumerate_strips_from_first_dot() {
    let s = MemoStore {
        entries: vec![entry("1.txt", "a"), entry("2.tar.gz", "b"), entry("note", "c")],
    };
    assert_eq!(s.enumerate(), vec!["1".to_string(), "2".to_string(), "note".to_string()]);
}

#[test]
fn list_numbers_positions_from_one() {
    let s = MemoStore { entries: vec![entry("5.txt", "first"), entry("9.txt", "second")] };
    assert_eq!(s.list(), vec!["1. first".to_string(), "2. second".to_string()]);
}
