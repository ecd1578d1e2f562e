use rtodo::store::MarkOutcome;
use rtodo::store::TodoList;

fn list_of(lines: &[&str]) -> TodoList {
    TodoList::from_lines(lines.iter().map(|s| s.to_string()).collect())
}

fn texts(t: &TodoList) -> Vec<String> {
    t.entries().clone()
}

#[test]
fn add_numbers_in_order() {
    let mut t = TodoList::from_lines(Vec::new());
    let l1 = t.add("buy milk");
    let l2 = t.add("call mom");
    let l3 = t.add("water plants");
    assert_eq!(l1, "1. buy milk");
    assert_eq!(l2, "2. call mom");
    assert_eq!(l3, "3. water plants");
    assert_eq!(texts(&t), vec!["1. buy milk", "2. call mom", "3. water plants"]);
}

#[test]
fn add_trims_surrounding_whitespace() {
    let mut t = TodoList::from_lines(Vec::new());
    let line = t.add("  buy milk \t\n");
    assert_eq!(line, "1. buy milk");
}

#[test]
fn add_empty_text_is_accepted() {
    let mut t = TodoList::from_lines(Vec::new());
    let line = t.add("");
    assert_eq!(line, "1. ");
    assert_eq!(t.len(), 1);
}

#[test]
fn delete_shifts_and_renumbers() {
    let mut t = list_of(&["1. a", "2. b", "3. c"]);
    let deleted = t.delete(2);
    assert!(deleted);
    assert_eq!(texts(&t), vec!["1. a", "3. c"]);
    let rewritten = t.rewrite_all();
    assert_eq!(rewritten, vec!["1. a", "2. c"]);
}

#[test]
fn delete_first_and_last() {
    let mut t = list_of(&["1. a", "2. b", "3. c"]);
    assert!(t.delete(1));
    assert_eq!(t.rewrite_all(), vec!["1. b", "2. c"]);
    let mut t = list_of(&["1. a", "2. b", "3. c"]);
    assert!(t.delete(3));
    assert_eq!(t.rewrite_all(), vec!["1. a", "2. b"]);
}

#[test]
fn mark_appends_marker_once() {
    let mut t = list_of(&["1. buy milk", "2. call mom"]);
    let r = t.mark_completed(1);
    assert_eq!(r, MarkOutcome::Marked);
    assert_eq!(texts(&t), vec!["1. buy milk \u{2605}", "2. call mom"]);
}

#[test]
fn mark_twice_is_idempotent() {
    let mut t = list_of(&["1. buy milk"]);
    assert_eq!(t.mark_completed(1), MarkOutcome::Marked);
    let after_first = texts(&t);
    assert_eq!(t.mark_completed(1), MarkOutcome::AlreadyCompleted);
    assert_eq!(texts(&t), after_first);
    assert_eq!(after_first, vec!["1. buy milk \u{2605}"]);
}

#[test]
fn mark_out_of_range_changes_nothing() {
    let mut t = list_of(&["1. a", "2. b"]);
    let before = texts(&t);
    assert_eq!(t.mark_completed(0), MarkOutcome::InvalidIndex);
    assert_eq!(t.mark_completed(3), MarkOutcome::InvalidIndex);
    assert_eq!(texts(&t), before);
}

#[test]
fn delete_out_of_range_changes_nothing() {
    let mut t = list_of(&["1. a", "2. b"]);
    let before = texts(&t);
    assert!(!t.delete(0));
    assert!(!t.delete(3));
    assert_eq!(texts(&t), before);
}

#[test]
fn mark_and_delete_on_empty_list() {
    let mut t = TodoList::from_lines(Vec::new());
    assert_eq!(t.mark_completed(1), MarkOutcome::InvalidIndex);
    assert!(!t.delete(1));
    assert_eq!(t.len(), 0);
}

#[test]
fn rewrite_strips_old_numbering() {
    let t = list_of(&["12. 3. old text", "banana", "  7.note"]);
    assert_eq!(t.rewrite_all(), vec!["1. old text", "2. banana", "3. note"]);
}

#[test]
fn rewrite_round_trip_is_stable() {
    let t = list_of(&["3. a", "x", "1. c \u{2605}"]);
    let once = t.rewrite_all();
    assert_eq!(once, vec!["1. a", "2. x", "3. c \u{2605}"]);
    let reloaded = TodoList::from_lines(once.clone());
    assert_eq!(reloaded.rewrite_all(), once);
}

#[test]
fn render_frames_entries_verbatim() {
    let t = list_of(&["1. a", "2. b"]);
    let out = t.render();
    assert_eq!(out.len(), 4);
    assert_eq!(out[0], "─────────────── TODO List ───────────────");
    assert_eq!(out[1], "1. a");
    assert_eq!(out[2], "2. b");
    assert_eq!(out[3], "─────────────── End List ────────────────");
}

#[test]
fn scenario_add_complete_delete() {
    // The backing file, simulated as its list of lines.
    let mut file: Vec<String> = Vec::new();

    // --add "buy milk": append-only fast path.
    let mut t = TodoList::from_lines(file.clone());
    let line = t.add("buy milk");
    file.push(line);
    assert_eq!(file, vec!["1. buy milk"]);

    // --add "call mom"
    let mut t = TodoList::from_lines(file.clone());
    let line = t.add("call mom");
    file.push(line);
    assert_eq!(file, vec!["1. buy milk", "2. call mom"]);

    // --completed 1: mark, then rewrite the whole store.
    let mut t = TodoList::from_lines(file.clone());
    assert_eq!(t.mark_completed(1), MarkOutcome::Marked);
    file = t.rewrite_all();
    assert_eq!(file, vec!["1. buy milk \u{2605}", "2. call mom"]);

    // --delete 1: remove, then rewrite with fresh numbering.
    let mut t = TodoList::from_lines(file.clone());
    assert!(t.delete(1));
    file = t.rewrite_all();
    assert_eq!(file, vec!["1. call mom"]);
}
