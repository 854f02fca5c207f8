use uberbot::history::MessageHistory;

fn strings(v: &[&str]) -> Vec<String> {
    v.iter().map(|s| s.to_string()).collect()
}

#[test]
fn capacity_two_keeps_the_two_most_recent() {
    let mut h = MessageHistory::new(2);
    h.add_message("a", "x".to_string());
    h.add_message("a", "y".to_string());
    h.add_message("a", "z".to_string());
    assert_eq!(h.last_msgs("a", 2), Some(strings(&["y", "z"])));
    assert_eq!(h.last_msg("a"), Some("z".to_string()));
}

#[test]
fn unknown_author_has_no_messages() {
    let mut h = MessageHistory::new(3);
    h.add_message("a", "x".to_string());
    assert_eq!(h.last_msgs("b", 2), None);
    assert_eq!(h.last_msg("b"), None);
    assert!(!h.edit_message("b", 0, "q".to_string()));
}

#[test]
fn fewer_messages_than_asked_for() {
    let mut h = MessageHistory::new(5);
    h.add_message("a", "x".to_string());
    h.add_message("a", "y".to_string());
    assert_eq!(h.last_msgs("a", 10), Some(strings(&["x", "y"])));
    assert_eq!(h.last_msgs("a", 1), Some(strings(&["y"])));
    assert_eq!(h.last_msgs("a", 0), Some(strings(&[])));
}

#[test]
fn edit_replaces_the_slot_at_depth() {
    let mut h = MessageHistory::new(3);
    h.add_message("a", "one".to_string());
    h.add_message("a", "two".to_string());
    h.add_message("a", "three".to_string());
    assert!(h.edit_message("a", 0, "THREE".to_string()));
    assert!(h.edit_message("a", 2, "ONE".to_string()));
    assert!(!h.edit_message("a", 3, "nothing".to_string()));
    assert_eq!(h.last_msgs("a", 3), Some(strings(&["ONE", "two", "THREE"])));
}

#[test]
fn one_more_than_the_capacity_keeps_the_most_recent() {
    for n in 1..6usize {
        let mut h = MessageHistory::new(n);
        for i in 0..=n {
            h.add_message("a", format!("m{}", i));
        }
        let expected: Vec<String> = (1..=n).map(|i| format!("m{}", i)).collect();
        assert_eq!(h.last_msgs("a", n), Some(expected));
        assert_eq!(h.last_msg("a"), Some(format!("m{}", n)));
    }
}

#[test]
fn edit_after_add_replaces_the_most_recent() {
    let mut h = MessageHistory::new(2);
    h.add_message("a", "x".to_string());
    assert!(h.edit_message("a", 0, "X".to_string()));
    assert_eq!(h.last_msg("a"), Some("X".to_string()));
    h.add_message("a", "y".to_string());
    h.add_message("a", "z".to_string());
    assert!(h.edit_message("a", 0, "Z".to_string()));
    assert_eq!(h.last_msgs("a", 2), Some(strings(&["y", "Z"])));
    // the slot of a message that has left the log cannot be edited
    assert!(!h.edit_message("a", 2, "gone".to_string()));
}

#[test]
fn authors_have_logs_of_their_own() {
    let mut h = MessageHistory::new(1);
    h.add_message("a", "from a".to_string());
    h.add_message("b", "from b".to_string());
    h.add_message("A", "from A".to_string());
    assert_eq!(h.last_msg("a"), Some("from a".to_string()));
    assert_eq!(h.last_msg("b"), Some("from b".to_string()));
    assert_eq!(h.last_msg("A"), Some("from A".to_string()));
}

#[test]
fn a_history_without_room_records_the_author_only() {
    let mut h = MessageHistory::new(0);
    h.add_message("a", "x".to_string());
    h.add_message("a", "y".to_string());
    assert_eq!(h.last_msg("a"), None);
    assert_eq!(h.last_msgs("a", 3), Some(vec![]));
    assert_eq!(h.last_msgs("b", 3), None);
    assert!(!h.edit_message("a", 0, "z".to_string()));
}
