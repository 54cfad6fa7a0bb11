use clipboard_manager::history::MAX_HISTORY_SIZE;
use clipboard_manager::item::{ClipboardContent, ClipboardItem, Timestamp};
use clipboard_manager::manager::{hash_text, ClipboardManager};
use clipboard_manager::paste::ClipboardPayload;

fn texts(manager: &ClipboardManager) -> Vec<String> {
    manager
        .get_history()
        .iter()
        .map(|item| match &item.content {
            ClipboardContent::Text(text) => text.clone(),
            ClipboardContent::Image { .. } => String::from("<image>"),
        })
        .collect()
}

fn unpinned_count(manager: &ClipboardManager) -> usize {
    manager.get_history().iter().filter(|item| !item.pinned).count()
}

fn add(manager: &mut ClipboardManager, text: &str) -> ClipboardItem {
    manager.add_text(text.to_string()).expect("the text is taken in")
}

#[test]
fn new_manager_is_empty() {
    assert!(ClipboardManager::new().get_history().is_empty());
    assert!(ClipboardManager::default().get_history().is_empty());
}

#[test]
fn repeated_text_is_turned_away() {
    let mut manager = ClipboardManager::new();
    let first = manager.add_text("hello".to_string());
    assert!(first.is_some());
    assert_eq!(manager.get_history().len(), 1);
    assert!(manager.add_text("hello".to_string()).is_none());
    assert_eq!(manager.get_history().len(), 1);
    assert_eq!(texts(&manager), vec!["hello"]);
}

#[test]
fn blank_text_is_turned_away() {
    let mut manager = ClipboardManager::new();
    assert!(manager.add_text(String::new()).is_none());
    assert!(manager.add_text("   ".to_string()).is_none());
    assert!(manager.add_text("\t\r\n".to_string()).is_none());
    assert!(manager.add_text("\u{3000}\u{a0}".to_string()).is_none());
    assert!(manager.get_history().is_empty());
    add(&mut manager, "kept");
    assert!(manager.add_text("".to_string()).is_none());
    assert!(manager.add_text("   ".to_string()).is_none());
    assert_eq!(texts(&manager), vec!["kept"]);
    // a blank text does not disturb the memory of the text ingested last
    assert!(manager.add_text("kept".to_string()).is_none());
}

#[test]
fn text_with_surrounding_space_is_kept_as_it_is() {
    let mut manager = ClipboardManager::new();
    let item = add(&mut manager, "  padded  ");
    assert_eq!(item.content, ClipboardContent::Text("  padded  ".to_string()));
    assert_eq!(item.preview, "  padded  ");
    assert!(!item.pinned);
}

#[test]
fn pinned_item_survives_eviction() {
    let mut manager = ClipboardManager::new();
    let keep = add(&mut manager, "keep");
    let pinned = manager.toggle_pin(&keep.id).expect("the entry is there");
    assert!(pinned.pinned);
    for n in 0..60 {
        add(&mut manager, &format!("t{}", n));
        assert!(unpinned_count(&manager) <= MAX_HISTORY_SIZE);
        assert!(manager.get_item(&keep.id).is_some());
    }
    let history = manager.get_history();
    assert_eq!(history.len(), MAX_HISTORY_SIZE + 1);
    assert_eq!(history[0].id, keep.id);
    assert!(history[0].pinned);
    assert_eq!(history[1].content, ClipboardContent::Text("t59".to_string()));
    assert_eq!(history[50].content, ClipboardContent::Text("t10".to_string()));
    assert_eq!(unpinned_count(&manager), MAX_HISTORY_SIZE);
}

#[test]
fn known_text_moves_to_front() {
    let mut manager = ClipboardManager::new();
    let old = add(&mut manager, "a");
    add(&mut manager, "b");
    add(&mut manager, "c");
    assert_eq!(texts(&manager), vec!["c", "b", "a"]);
    let again = add(&mut manager, "a");
    assert_eq!(texts(&manager), vec!["a", "c", "b"]);
    assert_ne!(again.id, old.id);
    assert!(manager.get_item(&old.id).is_none());
}

#[test]
fn text_at_the_top_is_not_added_again() {
    let mut manager = ClipboardManager::new();
    add(&mut manager, "a");
    add(&mut manager, "b");
    // the digest of the text ingested last is that of another text
    assert!(manager.admit_text("zzz", hash_text("zzz")));
    assert!(manager.add_text("b".to_string()).is_none());
    assert_eq!(texts(&manager), vec!["b", "a"]);
}

#[test]
fn pinned_duplicate_is_left_alone() {
    let mut manager = ClipboardManager::new();
    let a = add(&mut manager, "a");
    manager.toggle_pin(&a.id);
    add(&mut manager, "b");
    add(&mut manager, "a");
    assert_eq!(texts(&manager), vec!["a", "a", "b"]);
    let history = manager.get_history();
    assert!(history[0].pinned);
    assert!(!history[1].pinned);
}

#[test]
fn new_entry_goes_behind_the_pinned_ones() {
    let mut manager = ClipboardManager::new();
    let a = add(&mut manager, "a");
    manager.toggle_pin(&a.id);
    let b = add(&mut manager, "b");
    assert_eq!(texts(&manager), vec!["a", "b"]);
    manager.toggle_pin(&b.id);
    add(&mut manager, "c");
    assert_eq!(texts(&manager), vec!["a", "b", "c"]);
    add(&mut manager, "d");
    assert_eq!(texts(&manager), vec!["a", "b", "d", "c"]);
}

#[test]
fn pinned_entry_keeps_its_place_among_unpinned_ones() {
    let mut manager = ClipboardManager::new();
    let a = add(&mut manager, "a");
    add(&mut manager, "b");
    manager.toggle_pin(&a.id);
    assert_eq!(texts(&manager), vec!["b", "a"]);
    add(&mut manager, "c");
    assert_eq!(texts(&manager), vec!["c", "b", "a"]);
}

#[test]
fn pasted_text_is_turned_away_once() {
    let mut manager = ClipboardManager::new();
    let x = add(&mut manager, "x");
    add(&mut manager, "y");
    match manager.paste_item(&x) {
        Ok(ClipboardPayload::Text(text)) => assert_eq!(text, "x"),
        other => panic!("unexpected payload: {:?}", other),
    }
    assert!(manager.add_text("x".to_string()).is_none());
    assert_eq!(texts(&manager), vec!["y", "x"]);
    add(&mut manager, "z");
    assert!(manager.add_text("x".to_string()).is_some());
    assert_eq!(texts(&manager), vec!["x", "z", "y"]);
}

#[test]
fn paste_right_after_copy_leaves_the_suppression_armed() {
    let mut manager = ClipboardManager::new();
    let x = add(&mut manager, "x");
    assert!(manager.paste_item(&x).is_ok());
    // turned away as the text ingested last: the paste mark is not used up
    assert!(manager.add_text("x".to_string()).is_none());
    add(&mut manager, "z");
    assert!(manager.add_text("x".to_string()).is_none());
    assert!(manager.add_text("x".to_string()).is_some());
    assert_eq!(texts(&manager), vec!["x", "z"]);
}

#[test]
fn marked_text_stays_out_of_the_history() {
    let mut manager = ClipboardManager::new();
    manager.mark_text_as_pasted("\u{1f600}");
    assert!(manager.add_text("\u{1f600}".to_string()).is_none());
    assert!(manager.add_text("\u{1f600}".to_string()).is_none());
    assert!(manager.get_history().is_empty());
    add(&mut manager, "other");
    assert!(manager.add_text("\u{1f600}".to_string()).is_none());
    assert!(manager.add_text("\u{1f600}".to_string()).is_some());
}

#[test]
fn equal_digests_are_taken_for_the_same_text() {
    let mut manager = ClipboardManager::new();
    assert!(manager.admit_text("a", 7));
    assert!(!manager.admit_text("b", 7));
    assert!(manager.admit_text("b", 8));
    assert!(manager.get_history().is_empty());
}

#[test]
fn admit_text_removes_the_older_duplicate() {
    let mut manager = ClipboardManager::new();
    add(&mut manager, "a");
    add(&mut manager, "b");
    assert!(manager.admit_text("a", 1));
    assert_eq!(texts(&manager), vec!["b"]);
    assert!(!manager.admit_text("b", 2));
    assert_eq!(texts(&manager), vec!["b"]);
}

#[test]
fn toggle_pin_twice_restores() {
    let mut manager = ClipboardManager::new();
    add(&mut manager, "a");
    let b = add(&mut manager, "b");
    add(&mut manager, "c");
    let once = manager.toggle_pin(&b.id).expect("the entry is there");
    assert!(once.pinned);
    assert_eq!(once.id, b.id);
    assert_eq!(texts(&manager), vec!["c", "b", "a"]);
    assert!(manager.get_history()[1].pinned);
    let twice = manager.toggle_pin(&b.id).expect("the entry is there");
    assert!(!twice.pinned);
    assert_eq!(texts(&manager), vec!["c", "b", "a"]);
    assert!(manager.get_history().iter().all(|item| !item.pinned));
    assert!(manager.toggle_pin("no such id").is_none());
}

#[test]
fn clear_keeps_the_pinned_entries() {
    let mut manager = ClipboardManager::new();
    let a = add(&mut manager, "a");
    add(&mut manager, "b");
    let c = add(&mut manager, "c");
    add(&mut manager, "d");
    manager.toggle_pin(&a.id);
    manager.toggle_pin(&c.id);
    manager.clear();
    assert_eq!(texts(&manager), vec!["c", "a"]);
    assert!(manager.get_history().iter().all(|item| item.pinned));
    manager.clear();
    assert_eq!(texts(&manager), vec!["c", "a"]);
}

#[test]
fn remove_item_takes_pinned_entries_too() {
    let mut manager = ClipboardManager::new();
    let a = add(&mut manager, "a");
    let b = add(&mut manager, "b");
    manager.toggle_pin(&a.id);
    manager.remove_item(&a.id);
    assert_eq!(texts(&manager), vec!["b"]);
    manager.remove_item("no such id");
    assert_eq!(texts(&manager), vec!["b"]);
    manager.remove_item(&b.id);
    assert!(manager.get_history().is_empty());
}

#[test]
fn get_item_finds_by_id() {
    let mut manager = ClipboardManager::new();
    let a = add(&mut manager, "a");
    let b = add(&mut manager, "b");
    let found = manager.get_item(&a.id).expect("the entry is there");
    assert_eq!(found.content, ClipboardContent::Text("a".to_string()));
    assert_eq!(found.timestamp, a.timestamp);
    assert_eq!(manager.get_item(&b.id).expect("the entry is there").id, b.id);
    assert!(manager.get_item("").is_none());
}

#[test]
fn fifty_one_texts_keep_fifty() {
    let mut manager = ClipboardManager::new();
    for n in 0..51 {
        add(&mut manager, &format!("text {}", n));
    }
    let all = texts(&manager);
    assert_eq!(all.len(), 50);
    assert_eq!(all[0], "text 50");
    assert_eq!(all[49], "text 1");
    assert!(!all.contains(&"text 0".to_string()));
}

#[test]
fn capacity_counts_unpinned_entries_only() {
    let mut manager = ClipboardManager::new();
    let a = add(&mut manager, "a");
    let b = add(&mut manager, "b");
    manager.toggle_pin(&a.id);
    manager.toggle_pin(&b.id);
    for n in 0..50 {
        add(&mut manager, &format!("t{}", n));
    }
    assert_eq!(manager.get_history().len(), 52);
    add(&mut manager, "one more");
    assert_eq!(manager.get_history().len(), 52);
    assert!(manager.get_item(&a.id).is_some());
    assert!(manager.get_item(&b.id).is_some());
    assert!(!texts(&manager).contains(&"t0".to_string()));
}

#[test]
fn unpinning_beyond_capacity_is_trimmed_by_the_next_insertion() {
    let mut manager = ClipboardManager::new();
    let p = add(&mut manager, "p");
    manager.toggle_pin(&p.id);
    for n in 0..50 {
        add(&mut manager, &format!("t{}", n));
    }
    manager.toggle_pin(&p.id);
    assert_eq!(manager.get_history().len(), 51);
    assert_eq!(unpinned_count(&manager), 51);
    add(&mut manager, "new");
    let all = texts(&manager);
    assert_eq!(all.len(), 50);
    assert_eq!(all[0], "new");
    assert_eq!(all[1], "p");
    assert_eq!(all[49], "t2");
}

#[test]
fn insert_item_takes_a_pinned_entry() {
    let mut manager = ClipboardManager::new();
    add(&mut manager, "a");
    let mut item = ClipboardItem::with_text(
        "fixed".to_string(),
        Timestamp { secs: 10, nanos: 20 },
        "b".to_string(),
    );
    item.pinned = true;
    manager.insert_item(item);
    let history = manager.get_history();
    assert_eq!(history.len(), 2);
    assert_eq!(history[0].id, "fixed");
    assert!(history[0].pinned);
    assert_eq!(history[0].timestamp, Timestamp { secs: 10, nanos: 20 });
    assert_eq!(history[1].content, ClipboardContent::Text("a".to_string()));
}

#[test]
fn snapshot_is_independent_of_the_manager() {
    let mut manager = ClipboardManager::new();
    add(&mut manager, "a");
    let mut snapshot = manager.get_history();
    snapshot[0].pinned = true;
    snapshot.clear();
    assert_eq!(manager.get_history().len(), 1);
    assert!(!manager.get_history()[0].pinned);
}
